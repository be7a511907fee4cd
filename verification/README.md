# auto_claude

The decision logic of a coding-agent server, written in Verus and proved
against its contracts: prompt assembly, context compaction, tool routing and
tool schemas, the human-in-the-loop approval gate, session bookkeeping (LRU
sessions, steering, plan approvals, background commands, teammates), the task
board, user memory maintenance, skills and their evolution, harness surfaces,
drafts, decisions, approvals and rollbacks, run capture, and configuration
overrides.

## Layout

- `src/` — the verified library. Every function has a `requires`/`ensures`
  contract over spec functions and views; laws that relate several functions
  are public proof functions (`lemma_*`).
  - `text.rs`, `lists.rs`, `order.rs`, `json.rs`, `digest.rs` — strings, lists,
    sorted entries, JSON text and SHA-1, with the calls into `serde_json`,
    `regex`, `sha1` and `base64` behind small trusted wrappers.
  - `config/` — configuration values and environment overrides.
  - `domain/` — chat turns, compaction, tools, harness, human approval, memory,
    sessions, skills, tasks, events and run capture.
  - `api/` — request parsing and responses of the HTTP routes.
- `tests/` — tests of the library on concrete values.
- `app/` — a command-line front that reads and writes the repository's files,
  runs background commands and parses YAML and `.env` files; it covers the
  configuration, the harness snapshot, the task board, transcripts, events
  and background commands, not the chat server.

The agent's tool loop, the subagent's loop and a teammate's loop are step
functions (`AgentRunState::step`, `SubagentState::step`,
`TeammateLoopState::step`): the caller calls the model, runs the tools and
reads the inboxes, and hands back what came of it as the next event. The
agent's step decides for the synchronous chat (`AgentRunState::new`) or the
streaming chat (`AgentRunState::new_streaming`), which differ in how the reply
is gathered, when recovery is asked for, and how a run without a visible
reply ends.
Reading and writing files, the network and the model client stay outside the
library, which takes their results as plain values; the library reads the
clock only where a record is stamped with its time.
