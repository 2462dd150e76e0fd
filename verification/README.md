# moderac

Prompt-based testing: tests are markdown files with YAML frontmatter, skills
are reusable context prepended to a test's prompt, and an evaluation server
judges prompts and records runs.

- `src/` is the verified library (Verus): frontmatter splitting, the test
  suite and its skills, prompt resolution, path discovery order, the command
  line tool's decisions, and the server's rules (configuration, evaluation,
  API keys, sign-in codes, session cookies, updates and run verdicts).
- `tests/` exercises the library on concrete inputs.
- `app/` is the unverified shell around it: the `moderac` command line, file
  and network I/O, YAML and JSON, the database and the HTTP server.
