# Henka

Semantics-aware code operations for many projects behind one server: renames,
extractions and navigation queries, answered by language servers and offered as
MCP tools and over the language-server protocol.

- `src/` is the library: verified Rust with contracts that Verus proves. It holds
  the catalog of operations, the routing of requests to language backends, the
  steps of a run, the conversion of what language servers answer, the rules for
  working copies and edits, the settings, and the logic of the editor proxy.
- `tests/` runs the library on concrete values.
- `app/` is the program around it: the command line, the transports, child
  processes, the file system and version control.

## The library

| Module | What it decides |
| --- | --- |
| `text`, `path`, `uri`, `json`, `view` | texts, paths, URIs and JSON values, and their models |
| `edit`, `operation`, `language`, `project`, `error` | edits, operations, the catalog |
| `wire`, `wire_edit`, `source`, `convert` | answers of language servers, with the source they point at |
| `ops`, `protocol`, `mcp`, `workspace`, `pathmap` | tools, requests, routing, working copies |
| `run` | running an operation, step by step |
| `lsp` | the language-server surface |
| `ts_ops`, `analyzer` | operations on TypeScript, and the language server for Rust |
| `server_config` | settings and where they come from |
| `proxy` | the proxy that editors talk to |

Public proof functions state what holds across the library, such as that an edit
never names an absolute path that leads out of its working copy, whatever `..` it
holds (`run::absolute_paths_lead_inside`), that a backend is always given back what
it knew (`run::what_a_backend_knew_is_always_restored`), or that every call of the
proxy names its own project (`proxy::session::the_envelope_wins`).
