# iso_code

Managed git worktrees for tools that run many checkouts of one repository
side by side: guarded creation and deletion, garbage collection that never
drops metadata, per-branch port leases, and a state file that records it all.

The library in `src/` is verified with Verus. Every decision the worktree
lifecycle makes is a function there with a contract: parsing git's output,
the pre-create and pre-delete guards, the unmerged-commit check (as a state
machine that asks for one git probe at a time), port allocation, the state
transitions of create, attach, delete and gc, the command-line argument
grammar and the MCP tool table.

`app/` holds what runs around it: spawning git, reading the disk and the
mount table, the state file's JSON and its lock, ecosystem adapters, the
`wt` command and the MCP server. It asks the library at every step and only
performs what it is told.

Layout of `src/`:

- `types`, `error`: the public data types and the error type with its messages.
- `text`, `seqs`, `map`: text and sequence helpers, and `StringMap`, a map keyed by strings.
- `git`: version parsing, capabilities, the porcelain listing parser, command arguments.
- `guards`: the pre-create and pre-delete guards over probed facts.
- `unmerged`: the five-step unmerged-commit check.
- `ports`: preferred ports, allocation, leases and their expiry.
- `state`: the state file's model and every change the lifecycle makes to it.
- `manager`: the circuit breaker, guard order, and the create/attach/gc decisions.
- `lifecycle`: the operations as plans and step functions: the delete plan, the attach plan, the collection report, and the create's steps with the cleanup after each failure.
- `version_law`: the law that "git version a.b.c" output reads as version a.b.c.
- `adapter`, `config`, `copying`: adapter environment, what a shell command's run comes to, configuration, copy outcomes.
- `lock`: the state lock's retry policy and process start time parsing.
- `cli`, `mcp`: argument parsing and output formatting of `wt`, and the MCP routing.
- `hash`, `clock`: SHA-256, the clock and session ids, through their crates.
