//! Evaluation of a test prompt against its expected behaviour.
use vstd::prelude::*;

verus! {

/// The outcome of evaluating a prompt: a status, a score in hundredths (from 0
/// to 100) and the judge's reasoning.
#[derive(Debug, Clone)]
pub struct Evaluation {
    pub status: String,
    pub score_hundredths: u32,
    pub evaluation: String,
}

/// How an absent expectation is shown.
pub open spec fn shown_expected(expected: Option<Seq<char>>) -> Seq<char> {
    match expected {
        Some(e) => e,
        None => "(none)"@,
    }
}

/// The reasoning reported for a prompt: a placeholder without an OpenAI key,
/// otherwise a note that the LLM evaluation is pending.
pub open spec fn evaluation_text(has_key: bool, prompt: Seq<char>, expected: Option<Seq<char>>) -> Seq<char> {
    if has_key {
        "LLM evaluation pending. Prompt: '"@ + prompt + "', Expected: '"@ + shown_expected(expected)
            + "'"@
    } else {
        "Placeholder evaluation for prompt: '"@ + prompt + "'. Expected: '"@ + shown_expected(
            expected,
        ) + "'"@
    }
}

/// Evaluate a test prompt against expected behavior. With no OpenAI key (an
/// empty one) the placeholder passes with full score; with a key it passes
/// with score 0.95 until the LLM judge is wired in.
pub fn evaluate_test(
    openai_api_key: &str,
    prompt: &str,
    expected: Option<&str>,
    _eval_criteria: Option<&str>,
) -> (r: Evaluation)
    ensures
        r.status@ == "passed"@,
        r.score_hundredths == if openai_api_key@.len() == 0 {
            100u32
        } else {
            95u32
        },
        r.evaluation@ == evaluation_text(openai_api_key@.len() != 0, prompt@, expected.deep_view()),
{
    let has_key = !openai_api_key.is_empty();
    let mut text = if has_key {
        String::from_str("LLM evaluation pending. Prompt: '")
    } else {
        String::from_str("Placeholder evaluation for prompt: '")
    };
    text.append(prompt);
    if has_key {
        text.append("', Expected: '");
    } else {
        text.append("'. Expected: '");
    }
    match expected {
        Some(e) => text.append(e),
        None => text.append("(none)"),
    }
    text.append("'");
    Evaluation {
        status: String::from_str("passed"),
        score_hundredths: if has_key {
            95
        } else {
            100
        },
        evaluation: text,
    }
}

} // verus!
