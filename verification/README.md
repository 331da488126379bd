# azure_core_diag

Diagnostics capture for Azure SDK operations, verified with Verus. Four designs record the same
operation events through one `DiagSink` trait:

| Module | Design |
|---|---|
| `combo1` | a span arena, projected to a tree and encoded as an `AZD1` blob; free to drop on success |
| `combo2` | a retained model with a small summary by default and the full tree on demand or on error |
| `combo3` | spans and events that are materialized eagerly into typed objects (the baseline) |
| `combo4` | a pooled append-only log that is read and rendered only where a policy asks for it |

Around them: `wire` (the shared tree and its binary codec), `scenarios` (scripted operations and
the drivers that feed a sink), `spans` (what each node of a detailed tree holds), `tally`,
`status`, `charge`, `text`, `text_map`, `clock`, `report` (the comparison tables), and `driver`
(the policy of the Cosmos driver and its options).

Numbers that are doubles travel as bit patterns and text, and whoever calls the library sums and
formats them.

`app/` holds the programs `diag-bench` and `diag-decode`: timing, files, JSON, the `tracing`
pipeline and the mock HTTP client. `tests/` runs the library from outside.
