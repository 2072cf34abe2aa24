# omk

A local-first observational memory kernel for agents, written in Verus.

- Events are immutable evidence.
- Observations are source-backed interpretations.
- Claims are proposed or canonical state.
- Views are disposable, append-only context renderings.

The library under `src/` holds a whole memory as tables of plain records (`row.rs`) and proves every
request against a transition on their mathematical models:

| Module | Content |
| --- | --- |
| `kind`, `model`, `row`, `score`, `json` | vocabularies, records, tables, scores, JSON values |
| `text`, `table`, `order`, `graph`, `budget`, `mention` | texts, row selection, ordering, reachability, packing |
| `operation` | idempotency keys |
| `scope`, `event`, `observer`, `observation`, `claim_table`, `claim`, `view`, `privacy` | the requests |
| `recall`, `context`, `report` | reading: evidence, search, context bundles, Markdown, error classes |
| `column`, `store` | stored columns, starting a memory |
| `digest`, `stamp` | content hashes, identifiers and the time |
| `transition`, `law_*` | all requests as one function, and the laws of the memory |

Requests that need fresh identifiers or the time draw a `Stamp` first and hand it to a function
whose result is then determined. `app/` is the command line: it keeps the tables in SQLite, runs
full-text matches and prints JSON.
