//! The data of a test suite: prompt tests, skills, frontmatter and the
//! replies of the remote server.
use vstd::prelude::*;

verus! {

/// A prompt-based test parsed from a .md file.
#[derive(Debug, Clone)]
pub struct PromptTest {
    pub name: String,
    pub tags: Vec<String>,
    pub skills: Vec<String>,
    /// The prompt body (markdown content below frontmatter)
    pub prompt: String,
    pub expected: Option<String>,
}

/// What a [`PromptTest`] holds, as text.
pub struct PromptTestView {
    pub name: Seq<char>,
    pub tags: Seq<Seq<char>>,
    pub skills: Seq<Seq<char>>,
    pub prompt: Seq<char>,
    pub expected: Option<Seq<char>>,
}

impl View for PromptTest {
    type V = PromptTestView;

    open spec fn view(&self) -> PromptTestView {
        PromptTestView {
            name: self.name@,
            tags: self.tags.deep_view(),
            skills: self.skills.deep_view(),
            prompt: self.prompt@,
            expected: self.expected.deep_view(),
        }
    }
}

/// A reusable skill parsed from a .md file in the skills/ directory.
#[derive(Debug, Clone)]
pub struct Skill {
    pub name: String,
    pub description: Option<String>,
    /// The skill body (markdown content below frontmatter)
    pub body: String,
}

/// What a [`Skill`] holds, as text.
pub struct SkillView {
    pub name: Seq<char>,
    pub description: Option<Seq<char>>,
    pub body: Seq<char>,
}

impl View for Skill {
    type V = SkillView;

    open spec fn view(&self) -> SkillView {
        SkillView { name: self.name@, description: self.description.deep_view(), body: self.body@ }
    }
}

/// Frontmatter parsed from a test .md file.
#[derive(Debug, Clone)]
pub struct TestFrontmatter {
    pub name: Option<String>,
    pub tags: Vec<String>,
    pub skills: Vec<String>,
    pub expected: Option<String>,
}

impl Default for TestFrontmatter {
    fn default() -> (r: Self)
        ensures
            r.name is None,
            r.tags@.len() == 0,
            r.skills@.len() == 0,
            r.expected is None,
    {
        TestFrontmatter { name: None, tags: Vec::new(), skills: Vec::new(), expected: None }
    }
}

/// Frontmatter parsed from a skill .md file.
#[derive(Debug, Clone)]
pub struct SkillFrontmatter {
    pub name: Option<String>,
    pub description: Option<String>,
}

impl Default for SkillFrontmatter {
    fn default() -> (r: Self)
        ensures
            r.name is None,
            r.description is None,
    {
        SkillFrontmatter { name: None, description: None }
    }
}

/// The server's reply to a request to run a project's tests.
#[derive(Debug, Clone)]
pub struct RunResponse {
    pub run_id: String,
    pub status: String,
    pub tests_count: usize,
}

/// The server's reply to a request to create a test.
#[derive(Debug, Clone)]
pub struct TestResponse {
    pub id: String,
    pub name: String,
    pub prompt: String,
    pub status: String,
}

/// Mode the SDK operates in.
#[derive(Debug, Clone)]
pub enum Mode {
    /// Read/write tests from local `moderac-tests/` directory
    Local,
    /// Sync and run tests against moderac.com (or self-hosted)
    Remote { base_url: String, api_key: String },
}

/// The server a remote client talks to when none is configured.
pub open spec fn default_base_url() -> Seq<char> {
    "https://moderac.com"@
}

impl Mode {
    /// The mode the environment selects, from the values of `MODERAC_API_KEY`
    /// and `MODERAC_BASE_URL`: remote exactly when an API key is set.
    pub fn from_env_values(api_key: Option<String>, base_url: Option<String>) -> (m: Mode)
        ensures
            api_key is None ==> m is Local,
            api_key matches Some(key) ==> (m matches Mode::Remote { base_url: url, api_key: k } && k
                == key && url@ == match base_url {
                Some(u) => u@,
                None => default_base_url(),
            }),
    {
        match api_key {
            Some(key) => {
                let url = match base_url {
                    Some(u) => u,
                    None => String::from_str("https://moderac.com"),
                };
                Mode::Remote { base_url: url, api_key: key }
            },
            None => Mode::Local,
        }
    }
}

} // verus!
