# devctx

The logic of DevCtxEngine — a local code-context engine that indexes a git
repository into a vector store, keeps memories about it, and serves both to
agents — written in Verus, with each decision stated as a contract and proved.

## Layout

- `src/` — the library. Configuration and its defaults (`config`, `dirs`,
  `central`), chunking (`chunk`, `chunker`, `semantic`, `memory`), ranking
  (`rank`), the indexing run's decisions (`pipeline`, `git`, `watch`), the
  git hooks (`hooks`), the embedding registry and provider choice
  (`registry`, `models`), the servers' request gate and routing (`api`,
  `remote`, `central_remote`, `backend`, `mcp_state`, `workspace`), where an
  MCP call or memory goes and the cache of hinted projects (`routing`), update
  checks (`update_check`), the setup wizard's interview, decisions and texts
  (`wizard_flow`, `prompt_ui`, `init_wizard`, `wizard_text`, `help_map`), imports
  (`transfer_apply`), and what the command line prints (`cli`). Text and path
  helpers live in `text` and `path`; `json` names what is read out of JSON
  bodies.
- `tests/` — the tests, run against the compiled library.
- `app/` — the `devctx` command line: arguments, the terminal, files, git,
  the network, the file watcher, and the YAML and JSON shapes of the
  library's types. It talks to running servers and does not start them.

Laws — properties that relate several calls or hold of every input — are
public proof functions whose names begin with `law_`.
