# audit_http

The HTTP collector audit sink `dev.mcpg.audit.http`: it ships audit events to a
collector as bearer-authenticated JSON-array batches, and answers an event only
once the collector has answered its batch.

`src/` is the library. It decides; it does no I/O. Verus proves its contracts.

| Module | Content |
|---|---|
| `config` | the configuration: defaults, what is refused and why |
| `record` | the record of an event, its hash, the body of a batch |
| `retry` | one batch: what an attempt's outcome means, when to try again |
| `batch` | the jobs taken off the queue, and the replies to them |
| `writer` | the writer: from what happened to what to do next |
| `history` | what holds of a writer over its whole life |
| `sink` | loading a sink, its manifest, what its callers are told |
| `protocol` | receipts, errors, the manifest |
| `text` | small operations on text |

`app/` is the running side: the runtime, the queue, the HTTP client, the JSON form
of the configuration and the gateway's plugin interface. `tests/` drives the
library with a collector in memory.
