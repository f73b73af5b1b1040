# herdr_coordinator

The decision core of the Herdr harness coordinator, verified with Verus: a Supervisor Harness plans
Tasks, Worker Harnesses carry them out in Git worktrees, and the Coordinator keeps the durable
record of both.

- `src/ledger` holds the durable tables, every command and query on them, and the laws that all
  commands keep: one writer for each worktree, one active Task for each Worker, Task lifecycles
  that only move on, dependency graphs without cycles, Supervisor events delivered in order and one
  at a time, and nothing changed by a refused command, but for those that note what they learned
  on the way: dispatches and claims, Results of a revision that has one, reports of turns,
  cancellations, observations and Host failures, approvals, aborted starts and reaps. The tables
  keep texts (bodies, manifests, summaries, diagnostics, notes, evidence) by their numbers in a
  `NameTable`; `src/ledger/readback_laws` states that what was given is what is handed on, and
  `src/ledger/present` writes rows out with their texts. Instants, fresh identities, digests and
  the verdict on a Session come in with the commands.
- `src/activation`, `src/profile`, `src/workspace`, `src/cli`: which workspaces are enabled, with
  which Harnesses, and the command line that says so; `src/workspace_run` is the order in which a
  workspace is switched on and off.
- `src/repository`, `src/snapshots`, `src/scopes`, `src/paths`: what Git and the file system said
  of a worktree, and whether it stays within the write scopes of a Task.
- `src/adapter`, `src/process_adapter`, `src/provider_session`, `src/host`, `src/supervisor_host`:
  the protocols of the native providers and the decisions of the Hosts that run them. `src/reader`
  says what a line of a provider asks for; `src/worker_loop` and `src/supervisor_loop` are the loops
  of the Hosts and `src/worker_start` is the start of a Worker, as machines whose actions the
  program performs.
- `src/mcp`, `src/mcp_tools`, `src/herdr`, `src/attachment`: the tool server, the Herdr socket and
  the Attachment store.
- `src/text`, `src/select`, `src/names`, `src/digest`, `src/identity`, `src/json`: shared
  vocabulary. Calls into outside crates stand behind small trusted functions here and in
  `src/capability`, `src/profile` and `src/repository`; each says what is believed of the call.
- `app` is the program around the library: processes, sockets, files and SQLite.
- `tests` runs the library.
