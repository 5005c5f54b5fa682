# soulbook

The verified core of SoulBook, a collaborative knowledge base served over
HTTP. `src/` is a Verus library: every function there carries a contract that
Verus proves, and the properties that span several functions are stated and
proved as `law_*` proof functions next to the code they are about.

- `spaces`: request validation, space creation values, list queries scoped to
  the personal or a team workspace, member-space merging, access and ownership checks, statistics
  queries.
- `workspace`: user id forms, team validation and creation, the team queries,
  the workspace list (owned and member teams, sorted by lowercased name).
- `git_sync`: GitHub URL parsing, Markdown export of documents, the step-by-step
  run that pushes files through the GitHub contents API, repository bindings.
- `ai_tasks`: paging, Markdown clean-up, keyword extraction and the result of
  each kind of AI task; task list queries and statistics.
- `oidc`: the SoulAuth OpenID Connect login (authorization URL, PKCE, identity
  checks, the subject-first choice of the local user, redirects).
- `settings`, `tags`, `models`, `error`: settings sections, tags and their
  slugs, request types and errors.
- `text`, `num`, `fields`, `encoding`: the string, number and key/value
  operations the rest is written with, and the contracts of the outside
  encoders (URL, form, base64, SHA-256).

`app/` holds the unverified HTTP layer (axum routes, database and GitHub
calls, configuration and authentication) that asks the library what to do;
`tests/` exercises the library on concrete values.
