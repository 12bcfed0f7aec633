# koyori_task

The verified core of a task service with review findings and GitHub sync,
written in Verus.

- `src/` — the library. Every function is proved against its contract,
  except six small trusted wrappers around outside functions (SHA-256, hex
  and base64 encoding, random bytes, URL parsing, UUID display); their
  contracts are taken as given and each says in its doc comment what it
  claims of the function it calls:
  - `reviews`, `review_laws`: review rounds and findings, the transition table
    and who may make each move, deferred tasks, merge figures, and the laws
    that hold of them (the merge gate, `verified` is terminal, a fixer never
    verifies their own fix, ...).
  - `access`: who enters a tenant and its projects, who is notified, who
    manages project members, and the last-admin guard.
  - `sync`: two-way sync of GitHub issues and tasks through a content hash.
  - `github`: issue entries, repository choice, loopback-only base URLs, the
    summary comment, state tokens and keys.
  - `summary_job`: the summary job's payload and decisions.
  - `cli`: the command-line client's configuration, bodies, tokens and paths.
  - `text`, `tasks`, `errors`: shared text functions, task and status rows,
    HTTP error answers.
- `tests/` — tests of the library on concrete values.
- `app/` — ordinary Rust around the library: files, standard input, the
  environment, HTTP calls to GitHub, and the serde forms of the library's types.
