# pathfinder_nav

The decision logic of a code-navigation server's tools — go to definition,
callers and callees, impact analysis, a symbol with the signatures of what it
calls, and the language servers' health — written in Verus and verified
against contracts over mathematical models.

## Layout

- `src/` — the verified library.
  - `text`, `paths`, `uptime`: character-level helpers, `std::path`-style
    path reading and comparison, uptime text and its parsing.
  - `bfs`: the breadth-first call-hierarchy traversal as a state machine
    (the caller asks the language server, the traversal decides).
  - `impact`, `fallback`, `analyze`: the callers/callees tool and the
    impact-analysis tool: limits, text-search fallbacks, how the server's
    outcome and the fallbacks combine, the text answers.
  - `definition`: search patterns, the text-search strategies and their
    order, the definition answer and its errors.
  - `deep_context`, `imports`: dependency collection and the deep-context
    answer; the import lines of a file.
  - `health`, `probe`, `reason`: per-language readiness, probe decisions,
    the health report and its text; choosing a probe file; degradation
    reasons and readiness.
- `tests/` — tests of the library on concrete values.
- `app/` — the async glue around the library: language-server requests,
  text searches, file-system reads and the MCP results.
