//! Prompt-based testing: markdown test files with YAML frontmatter, reusable
//! skills, and the rules of the evaluation server that runs them.
pub mod text;
pub mod order;
pub mod types;
pub mod suite;
pub mod local;
pub mod client;
pub mod help;
pub mod cli;
pub mod server;

pub use client::Client;
pub use local::{discover_skills, discover_tests, load_suite, parse_frontmatter, resolve_prompt};
pub use suite::TestSuite;
pub use types::{
    Mode, PromptTest, RunResponse, Skill, SkillFrontmatter, TestFrontmatter, TestResponse,
};
